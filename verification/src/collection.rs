//! The application state: the ordered habit list, the focus index, the
//! global cursor, the status message, and the command processor over them.

use vstd::prelude::*;
use vstd::string::*;

use crate::bit::Bit;
use crate::clock;
use crate::count::Count;
use crate::float::Float;
use crate::command::{Command, CommandLineError, GoalKind, SideEffect, spec_error_text};
use crate::cursor::{Absolute, Cursor, spec_small_seek};
use crate::date::{Date, spec_day_number, spec_iso_date, spec_month_backward,
    spec_month_forward, spec_month_title};
use crate::events::{TrackEvent, ViewMode, spec_view_mode_label};
use crate::message::{Message, MessageKind};
use crate::strnum::{num_string, pad2_string, signed_string, spec_decimal, spec_pad2,
    spec_signed_decimal, str_equal};
use crate::variant::HabitVariant;

verus! {

/// Width of one habit's rendered view, in character cells.
pub const VIEW_WIDTH: usize = 25;

/// Height of one habit's rendered view, in rows.
pub const VIEW_HEIGHT: usize = 8;

/// How many habit views stand in one row of the grid.
pub const GRID_WIDTH: usize = 3;

/// The two halves of the status bar: progress text and timestamp.
pub struct StatusLine(pub String, pub String);

/// No two habits share a name.
pub open spec fn spec_names_unique(hs: Seq<HabitVariant>) -> bool {
    forall|i: int, j: int|
        0 <= i < j < hs.len() ==> (#[trigger] hs[i]).spec_name() != (#[trigger] hs[j]).spec_name()
}

/// Some habit carries the name `n`.
pub open spec fn spec_contains_name(hs: Seq<HabitVariant>, n: Seq<char>) -> bool {
    exists|i: int| 0 <= i < hs.len() && (#[trigger] hs[i]).spec_name() == n
}

/// The position of the habit named `n`.
pub open spec fn spec_name_index(hs: Seq<HabitVariant>, n: Seq<char>) -> int {
    choose|i: int| 0 <= i < hs.len() && (#[trigger] hs[i]).spec_name() == n
}

/// The interactive application state.
pub struct App {
    pub habits: Vec<HabitVariant>,
    pub focus: usize,
    pub cursor: Cursor,
    pub message: Message,
}

impl App {
    /// Every habit well-formed, names unique, the focus valid (0 when the
    /// collection is empty), the cursor a real day.
    pub open spec fn wf(self) -> bool {
        &&& forall|i: int| 0 <= i < self.habits@.len() ==> (#[trigger] self.habits@[i]).wf()
        &&& spec_names_unique(self.habits@)
        &&& if self.habits@.len() == 0 {
            self.focus == 0
        } else {
            self.focus < self.habits@.len()
        }
        &&& self.cursor.0.spec_valid()
    }

    /// The focused habit's view mode; day mode for an empty collection.
    pub open spec fn spec_get_mode(self) -> ViewMode {
        if self.habits@.len() == 0 {
            ViewMode::Day
        } else {
            self.habits@[self.focus as int].spec_view_mode()
        }
    }

    pub fn new() -> (r: App)
        ensures
            r.wf(),
            r.habits@.len() == 0,
            r.focus == 0,
            r.message.msg@
                == "Type :add <habit-name> [goal] to get started, Ctrl-L to dismiss"@,
            r.message.kind == MessageKind::Info,
    {
        App { habits: Vec::new(), focus: 0, cursor: Cursor::new(), message: Message::startup() }
    }

    /// Appends a habit; the caller has ruled out a name collision.
    pub fn add_habit(&mut self, h: HabitVariant)
        requires
            old(self).wf(),
            h.wf(),
            !spec_contains_name(old(self).habits@, h.spec_name()),
        ensures
            final(self).wf(),
            final(self).habits@ == old(self).habits@.push(h),
            final(self).focus == old(self).focus,
            final(self).cursor == old(self).cursor,
            final(self).message == old(self).message,
    {
        proof {
            let hs = self.habits@;
            assert forall|i: int, j: int|
                0 <= i < j < hs.push(h).len() implies (#[trigger] hs.push(h)[i]).spec_name()
                != (#[trigger] hs.push(h)[j]).spec_name() by {
                if j == hs.len() {
                    assert(hs.push(h)[i] == hs[i]);
                    if hs[i].spec_name() == h.spec_name() {
                        assert(spec_contains_name(hs, h.spec_name()));
                    }
                } else {
                    assert(hs.push(h)[i] == hs[i]);
                    assert(hs.push(h)[j] == hs[j]);
                }
            }
        }
        self.habits.push(h);
    }

    /// Every habit's name, in display order.
    pub fn list_habits(&self) -> (r: Vec<String>)
        ensures
            r@.len() == self.habits@.len(),
            forall|i: int|
                0 <= i < r@.len() ==> (#[trigger] r@[i])@ == self.habits@[i].spec_name(),
    {
        let mut r: Vec<String> = Vec::new();
        let mut i: usize = 0;
        while i < self.habits.len()
            invariant
                i <= self.habits@.len(),
                r@.len() == i,
                forall|k: int|
                    0 <= k < i ==> (#[trigger] r@[k])@ == self.habits@[k].spec_name(),
            decreases self.habits@.len() - i,
        {
            r.push(self.habits[i].name());
            i = i + 1;
        }
        r
    }

    /// True iff some habit carries the name `n`.
    pub fn contains_name(&self, n: &str) -> (r: bool)
        ensures
            r == spec_contains_name(self.habits@, n@),
    {
        let mut i: usize = 0;
        while i < self.habits.len()
            invariant
                i <= self.habits@.len(),
                forall|k: int| 0 <= k < i ==> (#[trigger] self.habits@[k]).spec_name() != n@,
            decreases self.habits@.len() - i,
        {
            let hn = self.habits[i].name();
            if str_equal(hn.as_str(), n) {
                proof {
                    assert(self.habits@[i as int].spec_name() == n@);
                }
                return true;
            }
            i = i + 1;
        }
        false
    }

    pub fn get_mode(&self) -> (r: ViewMode)
        requires
            self.wf(),
        ensures
            r == self.spec_get_mode(),
    {
        if self.habits.is_empty() {
            return ViewMode::Day;
        }
        self.habits[self.focus].view_mode()
    }

    /// Sets the focused habit's view mode; a no-op on an empty collection.
    pub fn set_mode(&mut self, mode: ViewMode)
        requires
            old(self).wf(),
        ensures
            final(self).wf(),
            final(self).habits@.len() == old(self).habits@.len(),
            old(self).habits@.len() == 0 ==> *final(self) == *old(self),
            old(self).habits@.len() > 0 ==> {
                &&& final(self).spec_get_mode() == mode
                &&& forall|k: int|
                    0 <= k < old(self).habits@.len() && k != old(self).focus
                        ==> final(self).habits@[k] == old(self).habits@[k]
                &&& HabitVariant::spec_same_content(
                    old(self).habits@[old(self).focus as int],
                    final(self).habits@[old(self).focus as int],
                )
            },
            final(self).focus == old(self).focus,
            final(self).cursor == old(self).cursor,
            final(self).message == old(self).message,
    {
        if !self.habits.is_empty() {
            let f = self.focus;
            self.habits[f].set_view_mode(mode);
            proof {
                assert forall|i: int, j: int|
                    0 <= i < j < self.habits@.len() implies (
                #[trigger] self.habits@[i]).spec_name() != (
                #[trigger] self.habits@[j]).spec_name() by {
                    assert(old(self).habits@[i].spec_name() != old(
                        self,
                    ).habits@[j].spec_name());
                }
            }
        }
    }

    pub fn clear_message(&mut self)
        ensures
            final(self).message.msg@ == Seq::<char>::empty(),
            final(self).message.kind == old(self).message.kind,
            final(self).habits == old(self).habits,
            final(self).focus == old(self).focus,
            final(self).cursor == old(self).cursor,
    {
        self.message.clear();
    }

    /// The size of the rendered grid plus the two status rows, as
    /// (width, height) in character cells.
    pub fn max_size(&self) -> (r: (usize, usize))
        requires
            self.habits@.len() <= 1000000,
        ensures
            r.0 == GRID_WIDTH * VIEW_WIDTH,
            r.1 == if self.habits@.len() == 0 {
                2int
            } else {
                VIEW_HEIGHT * ((self.habits@.len() + GRID_WIDTH - 1) / GRID_WIDTH as int) + 2
            },
    {
        let width: usize = GRID_WIDTH * VIEW_WIDTH;
        let height: usize = if !self.habits.is_empty() {
            VIEW_HEIGHT * ((self.habits.len() + GRID_WIDTH - 1) / GRID_WIDTH)
        } else {
            0
        };
        (width, height + 2)
    }

    /// Where a directional focus move lands on a grid of `GRID_WIDTH`
    /// columns: left and right move by one, up and down by a row, all
    /// clamped to the habit list; no wraparound.
    pub open spec fn spec_focus_after(len: nat, f: nat, d: Absolute) -> nat {
        if len == 0 {
            f
        } else {
            match d {
                Absolute::Right => if f != (len - 1) as nat {
                    (f + 1) as nat
                } else {
                    f
                },
                Absolute::Left => if f != 0 {
                    (f - 1) as nat
                } else {
                    0
                },
                Absolute::Down => if (len - 1) - f > GRID_WIDTH {
                    (f + GRID_WIDTH) as nat
                } else {
                    (len - 1) as nat
                },
                Absolute::Up => if f >= GRID_WIDTH {
                    (f - GRID_WIDTH) as nat
                } else {
                    0
                },
                Absolute::Stay => f,
            }
        }
    }

    /// Moves the focus one step in direction `d`; a no-op on an empty
    /// collection. The focus never leaves `[0, len - 1]`.
    pub fn set_focus(&mut self, d: Absolute)
        requires
            old(self).wf(),
        ensures
            final(self).wf(),
            final(self).focus == App::spec_focus_after(
                old(self).habits@.len(),
                old(self).focus as nat,
                d,
            ),
            old(self).habits@.len() > 0 ==> final(self).focus < old(self).habits@.len(),
            final(self).habits == old(self).habits,
            final(self).cursor == old(self).cursor,
            final(self).message == old(self).message,
    {
        if self.habits.is_empty() {
            return ;
        }
        let len = self.habits.len();
        match d {
            Absolute::Right => {
                if self.focus != len - 1 {
                    self.focus = self.focus + 1;
                }
            },
            Absolute::Left => {
                if self.focus != 0 {
                    self.focus = self.focus - 1;
                }
            },
            Absolute::Down => {
                if len - 1 - self.focus > GRID_WIDTH {
                    self.focus = self.focus + GRID_WIDTH;
                } else {
                    self.focus = len - 1;
                }
            },
            Absolute::Up => {
                if self.focus >= GRID_WIDTH {
                    self.focus = self.focus - GRID_WIDTH;
                } else {
                    self.focus = 0;
                }
            },
            Absolute::Stay => {},
        }
    }

    /// The habit at position `i`.
    pub fn habit_at(&self, i: usize) -> (r: &HabitVariant)
        requires
            i < self.habits@.len(),
        ensures
            r == self.habits@[i as int],
    {
        &self.habits[i]
    }

    /// Applies one tracking event to the habit at position `i`.
    pub fn modify_habit(&mut self, i: usize, date: Date, event: TrackEvent)
        requires
            old(self).wf(),
            i < old(self).habits@.len(),
            date.spec_valid(),
            old(self).habits@[i as int].spec_modify_safe(date, event),
        ensures
            final(self).wf(),
            final(self).habits@.len() == old(self).habits@.len(),
            HabitVariant::spec_modified(
                old(self).habits@[i as int],
                final(self).habits@[i as int],
                date,
                event,
            ),
            forall|k: int|
                0 <= k < old(self).habits@.len() && k != i ==> final(self).habits@[k] == old(
                    self,
                ).habits@[k],
            final(self).focus == old(self).focus,
            final(self).cursor == old(self).cursor,
            final(self).message == old(self).message,
    {
        self.habits[i].modify(date, event);
        proof {
            assert forall|p: int, q: int|
                0 <= p < q < self.habits@.len() implies (
            #[trigger] self.habits@[p]).spec_name() != (
            #[trigger] self.habits@[q]).spec_name() by {
                assert(old(self).habits@[p].spec_name() != old(self).habits@[q].spec_name());
            }
        }
    }

    /// Pages the global cursor and every habit's own cursor one month ahead.
    pub fn sift_forward(&mut self)
        requires
            old(self).wf(),
        ensures
            final(self).wf(),
            final(self).cursor.0 == spec_month_forward(old(self).cursor.0),
            spec_cursors_broadcast(
                old(self).habits@,
                final(self).habits@,
                |d: Date| spec_month_forward(d),
            ),
            final(self).focus == old(self).focus,
            final(self).message == old(self).message,
    {
        self.cursor.month_forward();
        let mut i: usize = 0;
        while i < self.habits.len()
            invariant
                self.cursor.0 == spec_month_forward(old(self).cursor.0),
                self.cursor.0.spec_valid(),
                self.focus == old(self).focus,
                self.message == old(self).message,
                forall|k: int| 0 <= k < old(self).habits@.len() ==> (#[trigger] old(
                    self,
                ).habits@[k]).wf(),
                self.habits@.len() == old(self).habits@.len(),
                i <= self.habits@.len(),
                forall|k: int|
                    0 <= k < i ==> {
                        &&& HabitVariant::spec_same_content(
                            old(self).habits@[k],
                            #[trigger] self.habits@[k],
                        )
                        &&& self.habits@[k].wf()
                        &&& self.habits@[k].spec_inner().cursor.0 == spec_month_forward(
                            old(self).habits@[k].spec_inner().cursor.0,
                        )
                        &&& self.habits@[k].spec_inner().view_mode == old(
                            self,
                        ).habits@[k].spec_inner().view_mode
                    },
                forall|k: int|
                    i <= k < self.habits@.len() ==> #[trigger] self.habits@[k] == old(
                        self,
                    ).habits@[k],
            decreases self.habits@.len() - i,
        {
            self.habits[i].cursor_month_forward();
            i = i + 1;
        }
        proof {
            lemma_names_carry(old(self).habits@, self.habits@);
        }
    }

    /// Pages the global cursor and every habit's own cursor one month back.
    pub fn sift_backward(&mut self)
        requires
            old(self).wf(),
        ensures
            final(self).wf(),
            final(self).cursor.0 == spec_month_backward(old(self).cursor.0),
            spec_cursors_broadcast(
                old(self).habits@,
                final(self).habits@,
                |d: Date| spec_month_backward(d),
            ),
            final(self).focus == old(self).focus,
            final(self).message == old(self).message,
    {
        self.cursor.month_backward();
        let mut i: usize = 0;
        while i < self.habits.len()
            invariant
                self.cursor.0 == spec_month_backward(old(self).cursor.0),
                self.cursor.0.spec_valid(),
                self.focus == old(self).focus,
                self.message == old(self).message,
                forall|k: int| 0 <= k < old(self).habits@.len() ==> (#[trigger] old(
                    self,
                ).habits@[k]).wf(),
                self.habits@.len() == old(self).habits@.len(),
                i <= self.habits@.len(),
                forall|k: int|
                    0 <= k < i ==> {
                        &&& HabitVariant::spec_same_content(
                            old(self).habits@[k],
                            #[trigger] self.habits@[k],
                        )
                        &&& self.habits@[k].wf()
                        &&& self.habits@[k].spec_inner().cursor.0 == spec_month_backward(
                            old(self).habits@[k].spec_inner().cursor.0,
                        )
                        &&& self.habits@[k].spec_inner().view_mode == old(
                            self,
                        ).habits@[k].spec_inner().view_mode
                    },
                forall|k: int|
                    i <= k < self.habits@.len() ==> #[trigger] self.habits@[k] == old(
                        self,
                    ).habits@[k],
            decreases self.habits@.len() - i,
        {
            self.habits[i].cursor_month_backward();
            i = i + 1;
        }
        proof {
            lemma_names_carry(old(self).habits@, self.habits@);
        }
    }

    /// Puts the global cursor and every habit's own cursor on `today`.
    pub fn reset_cursor_on(&mut self, today: Date)
        requires
            old(self).wf(),
            today.spec_valid(),
        ensures
            final(self).wf(),
            final(self).cursor.0 == today,
            spec_cursors_broadcast(old(self).habits@, final(self).habits@, |d: Date| today),
            final(self).focus == old(self).focus,
            final(self).message == old(self).message,
    {
        self.cursor.reset_to(today);
        let mut i: usize = 0;
        while i < self.habits.len()
            invariant
                self.cursor.0 == today,
                self.focus == old(self).focus,
                self.message == old(self).message,
                today.spec_valid(),
                forall|k: int| 0 <= k < old(self).habits@.len() ==> (#[trigger] old(
                    self,
                ).habits@[k]).wf(),
                self.habits@.len() == old(self).habits@.len(),
                i <= self.habits@.len(),
                forall|k: int|
                    0 <= k < i ==> {
                        &&& HabitVariant::spec_same_content(
                            old(self).habits@[k],
                            #[trigger] self.habits@[k],
                        )
                        &&& self.habits@[k].wf()
                        &&& self.habits@[k].spec_inner().cursor.0 == today
                        &&& self.habits@[k].spec_inner().view_mode == old(
                            self,
                        ).habits@[k].spec_inner().view_mode
                    },
                forall|k: int|
                    i <= k < self.habits@.len() ==> #[trigger] self.habits@[k] == old(
                        self,
                    ).habits@[k],
            decreases self.habits@.len() - i,
        {
            self.habits[i].cursor_reset_to(today);
            i = i + 1;
        }
        proof {
            lemma_names_carry(old(self).habits@, self.habits@);
        }
    }

    /// Puts the global cursor and every habit's own cursor on the current
    /// local day.
    pub fn reset_cursor(&mut self)
        requires
            old(self).wf(),
        ensures
            final(self).wf(),
            exists|t: Date|
                {
                    &&& t.spec_valid()
                    &&& final(self).cursor.0 == t
                    &&& #[trigger] spec_reset_broadcast(old(self).habits@, final(self).habits@, t)
                },
            final(self).focus == old(self).focus,
            final(self).message == old(self).message,
    {
        let t = clock::today();
        self.reset_cursor_on(t);
        proof {
            assert(spec_reset_broadcast(old(self).habits@, self.habits@, t));
        }
    }

    /// One fine-grained step of the global cursor and every habit's own
    /// cursor, relative to `today`.
    pub fn move_cursor_on(&mut self, d: Absolute, today: Date)
        requires
            old(self).wf(),
            today.spec_valid(),
        ensures
            final(self).wf(),
            final(self).cursor.0 == spec_small_seek(old(self).cursor.0, d, today),
            spec_cursors_broadcast(
                old(self).habits@,
                final(self).habits@,
                |c: Date| spec_small_seek(c, d, today),
            ),
            final(self).focus == old(self).focus,
            final(self).message == old(self).message,
    {
        self.cursor.small_seek(d, today);
        let mut i: usize = 0;
        while i < self.habits.len()
            invariant
                self.cursor.0 == spec_small_seek(old(self).cursor.0, d, today),
                self.cursor.0.spec_valid(),
                self.focus == old(self).focus,
                self.message == old(self).message,
                today.spec_valid(),
                forall|k: int| 0 <= k < old(self).habits@.len() ==> (#[trigger] old(
                    self,
                ).habits@[k]).wf(),
                self.habits@.len() == old(self).habits@.len(),
                i <= self.habits@.len(),
                forall|k: int|
                    0 <= k < i ==> {
                        &&& HabitVariant::spec_same_content(
                            old(self).habits@[k],
                            #[trigger] self.habits@[k],
                        )
                        &&& self.habits@[k].wf()
                        &&& self.habits@[k].spec_inner().cursor.0 == spec_small_seek(
                            old(self).habits@[k].spec_inner().cursor.0,
                            d,
                            today,
                        )
                        &&& self.habits@[k].spec_inner().view_mode == old(
                            self,
                        ).habits@[k].spec_inner().view_mode
                    },
                forall|k: int|
                    i <= k < self.habits@.len() ==> #[trigger] self.habits@[k] == old(
                        self,
                    ).habits@[k],
            decreases self.habits@.len() - i,
        {
            self.habits[i].move_cursor(d, today);
            i = i + 1;
        }
        proof {
            lemma_names_carry(old(self).habits@, self.habits@);
        }
    }

    /// One fine-grained step of the global cursor and every habit's own
    /// cursor, relative to the current local day.
    pub fn move_cursor(&mut self, d: Absolute)
        requires
            old(self).wf(),
        ensures
            final(self).wf(),
            exists|t: Date|
                {
                    &&& t.spec_valid()
                    &&& final(self).cursor.0 == spec_small_seek(old(self).cursor.0, d, t)
                    &&& #[trigger] spec_seek_broadcast(
                        old(self).habits@,
                        final(self).habits@,
                        d,
                        t,
                    )
                },
            final(self).focus == old(self).focus,
            final(self).message == old(self).message,
    {
        let t = clock::today();
        self.move_cursor_on(d, t);
        proof {
            assert(spec_seek_broadcast(old(self).habits@, self.habits@, d, t));
        }
    }

    /// Removes the habit named `name` (names are unique). On success the
    /// focus returns to 0; an unknown name is reported as an error and
    /// changes nothing else.
    pub fn delete_by_name(&mut self, name: &str)
        requires
            old(self).wf(),
        ensures
            final(self).wf(),
            !spec_contains_name(old(self).habits@, name@) ==> {
                &&& final(self).habits@ == old(self).habits@
                &&& final(self).focus == old(self).focus
                &&& final(self).message.msg@ == "Could not delete habit `"@ + name@ + "`"@
                &&& final(self).message.kind == MessageKind::Error
            },
            spec_contains_name(old(self).habits@, name@) ==> {
                &&& final(self).habits@ == old(self).habits@.remove(
                    spec_name_index(old(self).habits@, name@),
                )
                &&& final(self).focus == 0
                &&& final(self).message == old(self).message
            },
            final(self).cursor == old(self).cursor,
    {
        let ghost hs = self.habits@;
        let mut i: usize = 0;
        while i < self.habits.len()
            invariant
                old(self).wf(),
                hs == self.habits@,
                *self == *old(self),
                i <= hs.len(),
                forall|k: int| 0 <= k < i ==> (#[trigger] hs[k]).spec_name() != name@,
            decreases hs.len() - i,
        {
            let hn = self.habits[i].name();
            if str_equal(hn.as_str(), name) {
                proof {
                    assert(hs[i as int].spec_name() == name@);
                    assert(spec_contains_name(hs, name@));
                    let j = spec_name_index(hs, name@);
                    assert(0 <= j < hs.len() && hs[j].spec_name() == name@);
                    if j < i {
                        assert(hs[j].spec_name() != name@);
                    } else if i < j {
                        assert(hs[i as int].spec_name() != hs[j].spec_name());
                    }
                    assert(j == i as int);
                }
                self.habits.remove(i);
                self.focus = 0;
                proof {
                    let t = self.habits@;
                    assert forall|p: int, q: int|
                        0 <= p < q < t.len() implies (#[trigger] t[p]).spec_name() != (
                    #[trigger] t[q]).spec_name() by {
                        let p0: int = if p < i {
                            p
                        } else {
                            p + 1
                        };
                        let q0: int = if q < i {
                            q
                        } else {
                            q + 1
                        };
                        assert(t[p] == hs[p0] && t[q] == hs[q0]);
                        assert(hs[p0].spec_name() != hs[q0].spec_name());
                    }
                    assert forall|p: int| 0 <= p < t.len() implies (
                    #[trigger] t[p]).wf() by {
                        let p0: int = if p < i {
                            p
                        } else {
                            p + 1
                        };
                        assert(t[p] == hs[p0]);
                    }
                }
                return ;
            }
            i = i + 1;
        }
        proof {
            if spec_contains_name(hs, name@) {
                let j = choose|j: int| 0 <= j < hs.len() && (#[trigger] hs[j]).spec_name()
                    == name@;
                assert(hs[j].spec_name() != name@);
            }
        }
        let mut t: String = "Could not delete habit `".to_owned();
        t.append(name);
        t.append("`");
        proof {
            assert(t@ =~= "Could not delete habit `"@ + name@ + "`"@);
        }
        self.message.set_message(t);
        self.message.set_kind(MessageKind::Error);
    }

    /// The status line as of `today`: progress on the left, the cursor's
    /// timestamp on the right.
    pub open spec fn spec_status_left(self, t: Date) -> Seq<char> {
        let rem = spec_sum_remaining(self.habits@, t);
        let tot = spec_sum_goal(self.habits@);
        let completed: nat = if rem <= tot {
            (tot - rem) as nat
        } else {
            0
        };
        "Today: "@ + spec_decimal(completed) + " completed, "@ + spec_decimal(rem)
            + " remaining --"@ + spec_view_mode_label(self.spec_get_mode()) + "--"@
    }

    /// The timestamp half: "DD/Mon/YY" when the cursor sits on `t`, else the
    /// cursor's ISO date with how many days ago it lies.
    pub open spec fn spec_status_right(self, t: Date) -> Seq<char> {
        if self.cursor.0 == t {
            spec_pad2(t.day as nat) + "/"@ + spec_month_title(t.month) + "/"@ + spec_pad2(
                (t.year % 100) as nat,
            )
        } else {
            let diff = spec_day_number(t) - spec_day_number(self.cursor.0);
            spec_iso_date(self.cursor.0) + " ("@ + spec_signed_decimal(diff) + " day"@ + (
            if diff == 1 {
                Seq::<char>::empty()
            } else {
                "s"@
            }) + " ago)"@
        }
    }

    /// Renders the status bar as of `today`.
    pub fn status_on(&self, today: Date) -> (r: StatusLine)
        requires
            self.wf(),
            today.spec_valid(),
        ensures
            r.0@ == self.spec_status_left(today),
            r.1@ == self.spec_status_right(today),
    {
        let ghost hs = self.habits@;
        let mut rem: u128 = 0;
        let mut tot: u128 = 0;
        let mut i: usize = 0;
        proof {
            assert(hs.take(0) =~= Seq::<HabitVariant>::empty());
        }
        while i < self.habits.len()
            invariant
                self.wf(),
                today.spec_valid(),
                hs == self.habits@,
                i <= hs.len(),
                rem == spec_sum_remaining(hs.take(i as int), today),
                tot == spec_sum_goal(hs.take(i as int)),
                rem <= i * 0xffff_ffffu128,
                tot <= i * 0xffff_ffffu128,
            decreases hs.len() - i,
        {
            let ghost prefix = hs.take(i as int);
            let ghost prefix2 = hs.take(i as int + 1);
            proof {
                assert(prefix2.drop_last() =~= prefix);
                assert(prefix2.last() == hs[i as int]);
            }
            rem = rem + self.habits[i].remaining(today) as u128;
            tot = tot + self.habits[i].goal() as u128;
            i = i + 1;
        }
        proof {
            assert(hs.take(hs.len() as int) =~= hs);
            lemma_sums_ordered(hs, today);
        }
        let completed: u128 = tot - rem;

        let mut left: String = "Today: ".to_owned();
        left.append(num_string(completed).as_str());
        left.append(" completed, ");
        left.append(num_string(rem).as_str());
        left.append(" remaining --");
        left.append(self.get_mode().label().as_str());
        left.append("--");
        proof {
            assert(left@ =~= self.spec_status_left(today));
        }

        let cd = self.cursor.0;
        let right: String = if cd.year == today.year && cd.month == today.month && cd.day
            == today.day {
            let mut t: String = pad2_string(today.day);
            t.append("/");
            t.append(crate::date::month_title(today.month).as_str());
            t.append("/");
            t.append(pad2_string(today.year % 100).as_str());
            proof {
                assert(self.cursor.0 == today);
                assert(t@ =~= self.spec_status_right(today));
            }
            t
        } else {
            let dn_t = today.day_number();
            let dn_c = cd.day_number();
            let diff: i64 = (dn_t as i64) - (dn_c as i64);
            let mut t: String = cd.iso_string();
            t.append(" (");
            t.append(signed_string(diff).as_str());
            t.append(" day");
            if diff != 1 {
                t.append("s");
            }
            t.append(" ago)");
            proof {
                assert(self.cursor.0 != today);
                assert(t@ =~= self.spec_status_right(today));
            }
            t
        };
        StatusLine(left, right)
    }

    /// Renders the status bar as of the current local day.
    pub fn status(&self) -> (r: StatusLine)
        requires
            self.wf(),
        ensures
            exists|t: Date|
                {
                    &&& t.spec_valid()
                    &&& r.0@ == #[trigger] self.spec_status_left(t)
                    &&& r.1@ == self.spec_status_right(t)
                },
    {
        let t = clock::today();
        let r = self.status_on(t);
        proof {
            assert(r.0@ == self.spec_status_left(t));
        }
        r
    }

    /// The report rows for habit `n` as of `t`: one ISO date per day of
    /// `t`'s month before `t` with no entry; empty when no habit carries the
    /// name.
    pub open spec fn spec_missed_report(self, n: Seq<char>, t: Date, r: Seq<String>) -> bool {
        if !spec_contains_name(self.habits@, n) {
            r.len() == 0
        } else {
            let h = self.habits@[spec_name_index(self.habits@, n)];
            &&& forall|k: int|
                0 <= k < r.len() ==> spec_is_missed_row(h, t, (#[trigger] r[k])@)
            &&& forall|dd: u32|
                1 <= dd < t.day && !(#[trigger] h.spec_contains(
                    Date { year: t.year, month: t.month, day: dd },
                )) ==> exists|k: int|
                    0 <= k < r.len() && (#[trigger] r[k])@ == spec_iso_date(
                        Date { year: t.year, month: t.month, day: dd },
                    )
        }
    }

    /// The days of `today`'s month before `today` on which the habit named
    /// `name` has no entry, as ISO date strings; empty for an unknown name.
    pub fn missed_by_name_on(&self, name: &str, today: Date) -> (r: Vec<String>)
        requires
            self.wf(),
            today.spec_valid(),
        ensures
            self.spec_missed_report(name@, today, r@),
    {
        let ghost hs = self.habits@;
        let mut i: usize = 0;
        while i < self.habits.len()
            invariant
                self.wf(),
                today.spec_valid(),
                hs == self.habits@,
                i <= hs.len(),
                forall|k: int| 0 <= k < i ==> (#[trigger] hs[k]).spec_name() != name@,
            decreases hs.len() - i,
        {
            let hn = self.habits[i].name();
            if str_equal(hn.as_str(), name) {
                proof {
                    assert(hs[i as int].spec_name() == name@);
                    assert(spec_contains_name(hs, name@));
                    let j = spec_name_index(hs, name@);
                    if j < i {
                        assert(hs[j].spec_name() != name@);
                    } else if i < j {
                        assert(hs[i as int].spec_name() != hs[j].spec_name());
                    }
                    assert(j == i as int);
                }
                let ds = self.habits[i].missed_dates(today);
                let mut r: Vec<String> = Vec::new();
                let mut k: usize = 0;
                while k < ds.len()
                    invariant
                        k <= ds@.len(),
                        r@.len() == k,
                        forall|q: int|
                            0 <= q < ds@.len() ==> (#[trigger] ds@[q]).spec_valid(),
                        forall|q: int|
                            0 <= q < k ==> (#[trigger] r@[q])@ == spec_iso_date(ds@[q]),
                    decreases ds@.len() - k,
                {
                    r.push(ds[k].iso_string());
                    k = k + 1;
                }
                proof {
                    let h = hs[i as int];
                    assert forall|q: int| 0 <= q < r@.len() implies spec_is_missed_row(
                        h,
                        today,
                        (#[trigger] r@[q])@,
                    ) by {
                        let d = ds@[q];
                        assert(d.year == today.year && d.month == today.month && 1 <= d.day
                            < today.day && !h.spec_contains(d));
                        assert(d == Date {
                            year: today.year,
                            month: today.month,
                            day: d.day,
                        });
                        assert(r@[q]@ == spec_iso_date(d));
                        assert(spec_is_missed_row(h, today, r@[q]@));
                    }
                    assert forall|dd: u32|
                        1 <= dd < today.day && !(#[trigger] h.spec_contains(
                            Date { year: today.year, month: today.month, day: dd },
                        )) implies exists|q: int|
                        0 <= q < r@.len() && (#[trigger] r@[q])@ == spec_iso_date(
                            Date { year: today.year, month: today.month, day: dd },
                        ) by {
                        let d = Date { year: today.year, month: today.month, day: dd };
                        assert(ds@.contains(d));
                        let q = choose|q: int| 0 <= q < ds@.len() && ds@[q] == d;
                        assert(r@[q]@ == spec_iso_date(d));
                    }
                }
                return r;
            }
            i = i + 1;
        }
        proof {
            if spec_contains_name(hs, name@) {
                let j = choose|j: int| 0 <= j < hs.len() && (#[trigger] hs[j]).spec_name()
                    == name@;
                assert(hs[j].spec_name() != name@);
            }
        }
        Vec::new()
    }

    /// The missed-day report for habit `name` as of the current local day.
    pub fn missed_habits_by_name(&self, name: &str) -> (r: Vec<String>)
        requires
            self.wf(),
        ensures
            exists|t: Date|
                t.spec_valid() && #[trigger] self.spec_missed_report(name@, t, r@),
    {
        let t = clock::today();
        let r = self.missed_by_name_on(name, t);
        proof {
            assert(self.spec_missed_report(name@, t, r@));
        }
        r
    }

    /// Interprets one parsed command (or parse error) against this state,
    /// returning what the caller must still do (save, quit, archive).
    pub fn parse_command(&mut self, result: Result<Command, CommandLineError>) -> (eff:
        SideEffect)
        requires
            old(self).wf(),
        ensures
            final(self).wf(),
            spec_command_step(*old(self), *final(self), result, eff),
    {
        match result {
            Result::Ok(c) => match c {
                Command::Add(name, goal) => {
                    if self.contains_name(name.as_str()) {
                        self.message.set_kind(MessageKind::Error);
                        let mut t: String = "Habit `".to_owned();
                        t.append(name.as_str());
                        t.append("` already exist");
                        proof {
                            assert(t@ =~= "Habit `"@ + name@ + "` already exist"@);
                        }
                        self.message.set_message(t);
                        return SideEffect::Stay;
                    }
                    match goal {
                        Option::Some(GoalKind::Bit) => {
                            let h = HabitVariant::Bit(Bit::new(name.as_str()));
                            self.add_habit(h);
                        },
                        Option::Some(GoalKind::Count(v)) => {
                            let h = HabitVariant::Count(Count::new(name.as_str(), v));
                            self.add_habit(h);
                        },
                        Option::Some(GoalKind::Float(v, p)) => {
                            self.message.set_kind(MessageKind::Error);
                            self.message.set_message("Added floating habit".to_owned());
                            let h = HabitVariant::Float(Float::new(name.as_str(), v, p));
                            self.add_habit(h);
                        },
                        Option::None => {
                            let h = HabitVariant::Count(Count::new(name.as_str(), 0));
                            self.add_habit(h);
                        },
                    }
                    proof {
                        assert(self.habits@.drop_last() =~= old(self).habits@);
                    }
                    SideEffect::Stay
                },
                Command::Delete(name) => {
                    self.delete_by_name(name.as_str());
                    SideEffect::Stay
                },
                Command::Help(topic) => {
                    match topic {
                        Option::Some(t) => {
                            let msg: String = if str_equal(t.as_str(), "a") || str_equal(
                                t.as_str(),
                                "add",
                            ) {
                                "add <habit-name> [goal]     (alias: a)".to_owned()
                            } else if str_equal(t.as_str(), "aa") || str_equal(
                                t.as_str(),
                                "add-auto",
                            ) {
                                "add-auto <habit-name> [goal]     (alias: aa)".to_owned()
                            } else if str_equal(t.as_str(), "d") || str_equal(
                                t.as_str(),
                                "delete",
                            ) {
                                "delete <habit-name>     (alias: d)".to_owned()
                            } else if str_equal(t.as_str(), "mprev") || str_equal(
                                t.as_str(),
                                "month-prev",
                            ) {
                                "month-prev     (alias: mprev)".to_owned()
                            } else if str_equal(t.as_str(), "mnext") || str_equal(
                                t.as_str(),
                                "month-next",
                            ) {
                                "month-next     (alias: mnext)".to_owned()
                            } else if str_equal(t.as_str(), "tup") || str_equal(
                                t.as_str(),
                                "track-up",
                            ) {
                                "track-up <auto-habit-name>     (alias: tup)".to_owned()
                            } else if str_equal(t.as_str(), "archive") {
                                "archive old months to separate files".to_owned()
                            } else if str_equal(t.as_str(), "q") || str_equal(
                                t.as_str(),
                                "quit",
                            ) {
                                "quit dijo".to_owned()
                            } else if str_equal(t.as_str(), "w") || str_equal(
                                t.as_str(),
                                "write",
                            ) {
                                "write current state to disk   (alias: w)".to_owned()
                            } else if str_equal(t.as_str(), "h") || str_equal(t.as_str(), "?")
                                || str_equal(t.as_str(), "help") {
                                "help [<command>|commands|keys]     (aliases: h, ?)".to_owned()
                            } else if str_equal(t.as_str(), "cmds") || str_equal(
                                t.as_str(),
                                "commands",
                            ) {
                                "add, add-auto, delete, month-{prev,next}, track-{up,down}, archive, help, quit".to_owned()
                            } else if str_equal(t.as_str(), "keys") {
                                "no help on keys here yet".to_owned()
                            } else if str_equal(t.as_str(), "wq") {
                                "write current state to disk and quit dijo".to_owned()
                            } else {
                                "unknown command or help topic.".to_owned()
                            };
                            self.message.set_message(msg);
                        },
                        Option::None => {
                            self.message.set_message(
                                "help <command>|commands|keys".to_owned(),
                            );
                        },
                    }
                    SideEffect::Stay
                },
                Command::Quit => SideEffect::SaveAndQuit,
                Command::Write => SideEffect::Save,
                Command::WriteAndQuit => SideEffect::SaveAndQuit,
                Command::MonthNext => {
                    self.sift_forward();
                    SideEffect::Stay
                },
                Command::MonthPrev => {
                    self.sift_backward();
                    SideEffect::Stay
                },
                Command::Archive => SideEffect::ArchiveAndSave,
                Command::Blank => SideEffect::Stay,
            },
            Result::Err(e) => {
                let t = e.text();
                self.message.set_message(t);
                self.message.set_kind(MessageKind::Error);
                SideEffect::Stay
            },
        }
    }

    /// Replaces the live collection after an archive run's buckets were all
    /// written: `archived` months went out. The focus returns to 0.
    pub fn commit_archive(&mut self, live: Vec<HabitVariant>, archived: u32)
        requires
            old(self).wf(),
            forall|i: int| 0 <= i < live@.len() ==> (#[trigger] live@[i]).wf(),
            spec_names_unique(live@),
        ensures
            final(self).wf(),
            final(self).habits@ == live@,
            final(self).focus == 0,
            final(self).cursor == old(self).cursor,
            final(self).message.kind == old(self).message.kind,
            archived > 0 ==> final(self).message.msg@ == "Archived "@ + spec_decimal(
                archived as nat,
            ) + " month(s) of habits"@,
            archived == 0 ==> final(self).message.msg@ == "No old months to archive"@,
    {
        self.habits = live;
        self.focus = 0;
        if archived > 0 {
            let mut t: String = "Archived ".to_owned();
            t.append(num_string(archived as u128).as_str());
            t.append(" month(s) of habits");
            proof {
                assert(t@ =~= "Archived "@ + spec_decimal(archived as nat)
                    + " month(s) of habits"@);
            }
            self.message.set_message(t);
        } else {
            self.message.set_message("No old months to archive".to_owned());
        }
    }

    /// Reports a failed archive bucket write; the collection stays as it
    /// was.
    pub fn archive_write_failed(&mut self)
        requires
            old(self).wf(),
        ensures
            final(self).wf(),
            final(self).habits == old(self).habits,
            final(self).focus == old(self).focus,
            final(self).cursor == old(self).cursor,
            final(self).message.msg@ == "Failed to write archive file"@,
            final(self).message.kind == MessageKind::Error,
    {
        self.message.set_kind(MessageKind::Error);
        self.message.set_message("Failed to write archive file".to_owned());
    }
}

/// The outstanding amounts of all habits on `t`, summed.
pub open spec fn spec_sum_remaining(hs: Seq<HabitVariant>, t: Date) -> nat
    decreases hs.len(),
{
    if hs.len() == 0 {
        0
    } else {
        (spec_sum_remaining(hs.drop_last(), t) + hs.last().spec_remaining(t)) as nat
    }
}

/// The goal amounts of all habits, summed.
pub open spec fn spec_sum_goal(hs: Seq<HabitVariant>) -> nat
    decreases hs.len(),
{
    if hs.len() == 0 {
        0
    } else {
        (spec_sum_goal(hs.drop_last()) + hs.last().spec_goal_amount()) as nat
    }
}

/// Summed outstanding amounts never exceed summed goals.
proof fn lemma_sums_ordered(hs: Seq<HabitVariant>, t: Date)
    requires
        forall|i: int| 0 <= i < hs.len() ==> (#[trigger] hs[i]).wf(),
    ensures
        spec_sum_remaining(hs, t) <= spec_sum_goal(hs),
    decreases hs.len(),
{
    if hs.len() > 0 {
        assert forall|i: int| 0 <= i < hs.drop_last().len() implies (
        #[trigger] hs.drop_last()[i]).wf() by {
            assert(hs.drop_last()[i] == hs[i]);
        }
        lemma_sums_ordered(hs.drop_last(), t);
        crate::variant::lemma_remaining_le_goal(hs.last(), t);
    }
}

/// `h` is the fresh habit that an add of `name` with `goal` constructs:
/// empty stats, the given target, defaults everywhere else. A missing goal
/// makes a counted habit with target 0.
pub open spec fn spec_new_habit(h: HabitVariant, name: Seq<char>, goal: Option<GoalKind>) -> bool {
    h.wf() && h.spec_name() == name && match (h, goal) {
        (HabitVariant::Bit(b), Option::Some(GoalKind::Bit)) => b.stats@ == Map::<
            Date,
            crate::bit::CustomBool,
        >::empty() && b.goal.0 == true,
        (HabitVariant::Count(c), Option::Some(GoalKind::Count(v))) => c.stats@ == Map::<
            Date,
            u32,
        >::empty() && c.goal == v && c.auto == false,
        (HabitVariant::Float(f), Option::Some(GoalKind::Float(v, p))) => f.stats@ == Map::<
            Date,
            u32,
        >::empty() && f.goal == v && f.precision == p,
        (HabitVariant::Count(c), Option::None) => c.stats@ == Map::<Date, u32>::empty()
            && c.goal == 0 && c.auto == false,
        _ => false,
    }
}

/// The help text shown for a topic.
pub open spec fn spec_help_message(topic: Option<Seq<char>>) -> Seq<char> {
    match topic {
        Option::Some(s) => {
            if s == "a"@ || s == "add"@ {
                "add <habit-name> [goal]     (alias: a)"@
            } else if s == "aa"@ || s == "add-auto"@ {
                "add-auto <habit-name> [goal]     (alias: aa)"@
            } else if s == "d"@ || s == "delete"@ {
                "delete <habit-name>     (alias: d)"@
            } else if s == "mprev"@ || s == "month-prev"@ {
                "month-prev     (alias: mprev)"@
            } else if s == "mnext"@ || s == "month-next"@ {
                "month-next     (alias: mnext)"@
            } else if s == "tup"@ || s == "track-up"@ {
                "track-up <auto-habit-name>     (alias: tup)"@
            } else if s == "archive"@ {
                "archive old months to separate files"@
            } else if s == "q"@ || s == "quit"@ {
                "quit dijo"@
            } else if s == "w"@ || s == "write"@ {
                "write current state to disk   (alias: w)"@
            } else if s == "h"@ || s == "?"@ || s == "help"@ {
                "help [<command>|commands|keys]     (aliases: h, ?)"@
            } else if s == "cmds"@ || s == "commands"@ {
                "add, add-auto, delete, month-{prev,next}, track-{up,down}, archive, help, quit"@
            } else if s == "keys"@ {
                "no help on keys here yet"@
            } else if s == "wq"@ {
                "write current state to disk and quit dijo"@
            } else {
                "unknown command or help topic."@
            }
        },
        Option::None => "help <command>|commands|keys"@,
    }
}

/// How one processed command (or parse error) relates the state after to
/// the state before, and which side effect it asks of the caller.
pub open spec fn spec_command_step(
    pre: App,
    post: App,
    result: Result<Command, CommandLineError>,
    eff: SideEffect,
) -> bool {
    match result {
        Result::Ok(c) => match c {
            Command::Add(name, goal) => eff == SideEffect::Stay && post.cursor == pre.cursor
                && if spec_contains_name(pre.habits@, name@) {
                &&& post.habits@ == pre.habits@
                &&& post.focus == pre.focus
                &&& post.message.kind == MessageKind::Error
                &&& post.message.msg@ == "Habit `"@ + name@ + "` already exist"@
            } else {
                &&& post.habits@.len() == pre.habits@.len() + 1
                &&& post.habits@.drop_last() == pre.habits@
                &&& spec_new_habit(post.habits@.last(), name@, goal)
                &&& post.focus == pre.focus
                &&& match goal {
                    Option::Some(GoalKind::Float(_, _)) => post.message.kind
                        == MessageKind::Error && post.message.msg@ == "Added floating habit"@,
                    _ => post.message == pre.message,
                }
            },
            Command::Delete(name) => eff == SideEffect::Stay && post.cursor == pre.cursor
                && if spec_contains_name(pre.habits@, name@) {
                &&& post.habits@ == pre.habits@.remove(spec_name_index(pre.habits@, name@))
                &&& post.focus == 0
                &&& post.message == pre.message
            } else {
                &&& post.habits@ == pre.habits@
                &&& post.focus == pre.focus
                &&& post.message.msg@ == "Could not delete habit `"@ + name@ + "`"@
                &&& post.message.kind == MessageKind::Error
            },
            Command::Help(topic) => eff == SideEffect::Stay && post.habits == pre.habits
                && post.focus == pre.focus && post.cursor == pre.cursor && post.message.kind
                == pre.message.kind && post.message.msg@ == spec_help_message(
                match topic {
                    Option::Some(s) => Option::Some(s@),
                    Option::None => Option::None,
                },
            ),
            Command::Quit => eff == SideEffect::SaveAndQuit && post == pre,
            Command::Write => eff == SideEffect::Save && post == pre,
            Command::WriteAndQuit => eff == SideEffect::SaveAndQuit && post == pre,
            Command::MonthNext => eff == SideEffect::Stay && post.cursor.0
                == spec_month_forward(pre.cursor.0) && spec_cursors_broadcast(
                pre.habits@,
                post.habits@,
                |d: Date| spec_month_forward(d),
            ) && post.focus == pre.focus && post.message == pre.message,
            Command::MonthPrev => eff == SideEffect::Stay && post.cursor.0
                == spec_month_backward(pre.cursor.0) && spec_cursors_broadcast(
                pre.habits@,
                post.habits@,
                |d: Date| spec_month_backward(d),
            ) && post.focus == pre.focus && post.message == pre.message,
            Command::Archive => eff == SideEffect::ArchiveAndSave && post == pre,
            Command::Blank => eff == SideEffect::Stay && post == pre,
        },
        Result::Err(e) => eff == SideEffect::Stay && post.habits == pre.habits && post.focus
            == pre.focus && post.cursor == pre.cursor && post.message.msg@ == spec_error_text(
            e,
        ) && post.message.kind == MessageKind::Error,
    }
}

/// `s` is the ISO rendering of some day of `t`'s month before `t` that `h`
/// has no entry for.
pub open spec fn spec_is_missed_row(h: HabitVariant, t: Date, s: Seq<char>) -> bool {
    exists|dd: u32|
        1 <= dd < t.day && !(#[trigger] h.spec_contains(
            Date { year: t.year, month: t.month, day: dd },
        )) && s == spec_iso_date(Date { year: t.year, month: t.month, day: dd })
}

/// Every habit's cursor lands on `t`, content kept.
pub open spec fn spec_reset_broadcast(
    pre: Seq<HabitVariant>,
    post: Seq<HabitVariant>,
    t: Date,
) -> bool {
    spec_cursors_broadcast(pre, post, |d: Date| t)
}

/// Every habit's cursor takes one fine-grained step relative to `t`,
/// content kept.
pub open spec fn spec_seek_broadcast(
    pre: Seq<HabitVariant>,
    post: Seq<HabitVariant>,
    dir: Absolute,
    t: Date,
) -> bool {
    spec_cursors_broadcast(pre, post, |c: Date| spec_small_seek(c, dir, t))
}

/// Every habit keeps its content while its own cursor is rewritten by `f`
/// and its view mode stays.
pub open spec fn spec_cursors_broadcast(
    pre: Seq<HabitVariant>,
    post: Seq<HabitVariant>,
    f: spec_fn(Date) -> Date,
) -> bool {
    &&& post.len() == pre.len()
    &&& forall|k: int|
        0 <= k < pre.len() ==> {
            &&& HabitVariant::spec_same_content(pre[k], #[trigger] post[k])
            &&& post[k].spec_inner().cursor.0 == f(pre[k].spec_inner().cursor.0)
            &&& post[k].spec_inner().view_mode == pre[k].spec_inner().view_mode
        }
}

/// Habits that keep their content keep their names, so uniqueness carries
/// over.
proof fn lemma_names_carry(pre: Seq<HabitVariant>, post: Seq<HabitVariant>)
    requires
        post.len() == pre.len(),
        forall|k: int|
            0 <= k < pre.len() ==> HabitVariant::spec_same_content(
                pre[k],
                #[trigger] post[k],
            ),
        spec_names_unique(pre),
    ensures
        spec_names_unique(post),
{
    assert forall|i: int, j: int|
        0 <= i < j < post.len() implies (#[trigger] post[i]).spec_name() != (
    #[trigger] post[j]).spec_name() by {
        assert(HabitVariant::spec_same_content(pre[i], post[i]));
        assert(HabitVariant::spec_same_content(pre[j], post[j]));
        assert(pre[i].spec_name() != pre[j].spec_name());
    }
}

} // verus!
